//! The page of one album.

use super::album::{
    album_refresh_load_limit, media_query_for_album, Album, AlbumKind, MediaQuery,
};
#[allow(unused_imports)]
use super::album::{album_query, refresh_limit};
use crate::apply_to_media_list::ListConfig;
use crate::media::MediaItem;
#[allow(unused_imports)]
use crate::media_grid::controls::{
    id_position, ids_are_found_at_their_first_place, lemma_id_position_is,
};
use crate::media_grid::selection::IdSet;
#[allow(unused_imports)]
use crate::media_list::ListState;
use crate::media_list::{clone_items, MediaList};
use vstd::prelude::*;

verus! {

// ---------------------------------------------------------------------------
// Finding and removing photos

/// The position of the first photo with `id`.
pub fn index_for_media_id(list: &MediaList, id: i64) -> (index: Option<u32>)
    requires
        list.wf(),
    ensures
        index is Some <==> id_position(list@.items, id) < list@.items.len(),
        index matches Some(found) ==> found == id_position(list@.items, id) && found
            < list@.items.len() && list@.items[found as int].id == id,
        index is None ==> forall|k: int|
            0 <= k < list@.items.len() ==> (#[trigger] list@.items[k]).id != id,
{
    let n: u32 = list.n_items();
    let mut i: u32 = 0;
    while i < n
        invariant
            n == list@.items.len(),
            i <= n,
            forall|k: int| 0 <= k < i ==> (#[trigger] list@.items[k]).id != id,
        decreases n - i,
    {
        if list.item(i).unwrap().id == id {
            proof {
                lemma_id_position_is(list@.items, id, i as int);
            }
            return Some(i);
        }
        i += 1;
    }
    proof {
        lemma_id_position_is(list@.items, id, n as int);
    }
    None
}

/// The uri of the first photo with `id`.
pub fn media_uri_for_id(list: &MediaList, id: i64) -> (uri: Option<String>)
    requires
        list.wf(),
    ensures
        uri is Some <==> id_position(list@.items, id) < list@.items.len(),
        uri matches Some(found) ==> found@ == list@.items[id_position(list@.items, id)].uri@,
{
    match index_for_media_id(list, id) {
        Some(index) => Some(list.item(index).unwrap().uri.clone()),
        None => None,
    }
}

/// Remove the first photo with `id`; `true` when there was one.
pub fn remove_media_item_by_id(list: &mut MediaList, id: i64) -> (removed: bool)
    requires
        old(list).wf(),
    ensures
        final(list).wf(),
        removed == (id_position(old(list)@.items, id) < old(list)@.items.len()),
        final(list)@ == if removed {
            old(list)@.remove(id_position(old(list)@.items, id))
        } else {
            old(list)@
        },
{
    match index_for_media_id(list, id) {
        Some(index) => {
            list.remove(index);
            true
        },
        None => false,
    }
}

/// The list after the photos with one of `ids` among the first `end` went away,
/// one after the other, the last one first.
pub open spec fn without_ids(state: ListState, ids: Set<i64>, end: int) -> ListState
    decreases end,
{
    if end <= 0 {
        state
    } else if ids.contains(state.items[end - 1].id) {
        without_ids(state.remove(end - 1), ids, end - 1)
    } else {
        without_ids(state, ids, end - 1)
    }
}

/// Remove all photos with one of `ids`.
pub fn remove_media_items_by_ids(list: &mut MediaList, ids: &IdSet)
    requires
        old(list).wf(),
        ids.wf(),
    ensures
        final(list).wf(),
        final(list)@ == without_ids(old(list)@, ids@, old(list)@.items.len() as int),
{
    let ghost start = list@;
    let mut i: u32 = list.n_items();
    while i > 0
        invariant
            list.wf(),
            ids.wf(),
            i <= list@.items.len(),
            without_ids(start, ids@, start.items.len() as int) == without_ids(
                list@,
                ids@,
                i as int,
            ),
        decreases i,
    {
        i -= 1;
        let id: i64 = list.item(i).unwrap().id;
        if ids.contains(id) {
            list.remove(i);
        }
    }
}

/// The photos whose id is none of `ids`, in order.
pub open spec fn others(items: Seq<MediaItem>, ids: Set<i64>) -> Seq<MediaItem>
    decreases items.len(),
{
    if items.len() == 0 {
        items
    } else {
        let front = others(items.drop_last(), ids);
        if ids.contains(items.last().id) {
            front
        } else {
            front.push(items.last())
        }
    }
}

proof fn lemma_without_ids(state: ListState, ids: Set<i64>, end: int)
    requires
        0 <= end <= state.items.len(),
    ensures
        without_ids(state, ids, end).items == others(state.items.subrange(0, end), ids)
            + state.items.subrange(end, state.items.len() as int),
    decreases end,
{
    let items = state.items;
    if end == 0 {
        assert(others(items.subrange(0, 0), ids) + items.subrange(0, items.len() as int)
            =~= items);
    } else {
        assert(items.subrange(0, end).drop_last() =~= items.subrange(0, end - 1));
        assert(items.subrange(0, end).last() == items[end - 1]);
        if ids.contains(items[end - 1].id) {
            let next = state.remove(end - 1);
            lemma_without_ids(next, ids, end - 1);
            assert(next.items.subrange(0, end - 1) =~= items.subrange(0, end - 1));
            assert(next.items.subrange(end - 1, next.items.len() as int) =~= items.subrange(
                end,
                items.len() as int,
            ));
        } else {
            lemma_without_ids(state, ids, end - 1);
            assert(others(items.subrange(0, end - 1), ids) + items.subrange(
                end - 1,
                items.len() as int,
            ) =~= others(items.subrange(0, end), ids) + items.subrange(end, items.len() as int));
        }
    }
}

proof fn lemma_others_is_filter(items: Seq<MediaItem>, ids: Set<i64>)
    ensures
        others(items, ids) == items.filter(|item: MediaItem| !ids.contains(item.id)),
    decreases items.len(),
{
    reveal(Seq::filter);
    if items.len() > 0 {
        lemma_others_is_filter(items.drop_last(), ids);
    }
}

/// Removing photos by id leaves all others, in their order.
pub proof fn removing_ids_keeps_the_others(state: ListState, ids: Set<i64>)
    ensures
        without_ids(state, ids, state.items.len() as int).items == others(state.items, ids),
        without_ids(state, ids, state.items.len() as int).items == state.items.filter(
            |item: MediaItem| !ids.contains(item.id),
        ),
{
    lemma_others_is_filter(state.items, ids);
    let n = state.items.len() as int;
    lemma_without_ids(state, ids, n);
    assert(state.items.subrange(0, n) =~= state.items);
    assert(others(state.items, ids) + state.items.subrange(n, n) =~= others(state.items, ids));
}

// ---------------------------------------------------------------------------
// Refreshing

/// Are two entries the same photo?
pub open spec fn same_photo(a: MediaItem, b: MediaItem) -> bool {
    a.id == b.id && a.uri@ == b.uri@
}

fn same_media_identity(a: &MediaItem, b: &MediaItem) -> (same: bool)
    ensures
        same == same_photo(*a, *b),
{
    a.id == b.id && a.uri == b.uri
}

/// The number of photos at the front that both lists share.
pub open spec fn common_front(a: Seq<MediaItem>, b: Seq<MediaItem>) -> int
    decreases a.len(),
{
    if a.len() == 0 || b.len() == 0 || !same_photo(a[0], b[0]) {
        0
    } else {
        1 + common_front(a.subrange(1, a.len() as int), b.subrange(1, b.len() as int))
    }
}

proof fn lemma_common_front_is(a: Seq<MediaItem>, b: Seq<MediaItem>, p: int)
    requires
        0 <= p <= a.len(),
        p <= b.len(),
        forall|k: int| 0 <= k < p ==> same_photo(#[trigger] a[k], b[k]),
        p < a.len() && p < b.len() ==> !same_photo(a[p], b[p]),
    ensures
        common_front(a, b) == p,
    decreases p,
{
    if p > 0 {
        assert(same_photo(a[0], b[0]));
        let (x, y) = (a.subrange(1, a.len() as int), b.subrange(1, b.len() as int));
        assert forall|k: int| 0 <= k < p - 1 implies same_photo(#[trigger] x[k], y[k]) by {
            assert(same_photo(a[k + 1], b[k + 1]));
        }
        lemma_common_front_is(x, y, p - 1);
    }
}

/// Do the photos of `current` stand at the front of `refreshed` up to `front`,
/// and at its end from there on?
pub open spec fn surrounds(
    current: Seq<MediaItem>,
    refreshed: Seq<MediaItem>,
    front: int,
) -> bool {
    let shift = refreshed.len() - current.len();
    &&& forall|k: int| 0 <= k < front ==> same_photo(#[trigger] current[k], refreshed[k])
    &&& forall|k: int|
        front <= k < current.len() ==> same_photo(#[trigger] current[k], refreshed[k + shift])
}

/// Does `refreshed` hold the photos of `current` with new ones in one place
/// between them? That place is behind all photos that both share at the front.
pub open spec fn is_pure_insertion(current: Seq<MediaItem>, refreshed: Seq<MediaItem>) -> bool {
    current.len() < refreshed.len() && surrounds(
        current,
        refreshed,
        common_front(current, refreshed),
    )
}

/// Turn the list into `refreshed` by one insertion, where that is all it takes;
/// `true` when it is.
pub fn apply_pure_insertions(list: &mut MediaList, refreshed: &Vec<MediaItem>) -> (applied: bool)
    requires
        old(list).wf(),
        refreshed@.len() <= u32::MAX,
    ensures
        final(list).wf(),
        applied == is_pure_insertion(old(list)@.items, refreshed@),
        final(list)@ == if applied {
            let front = common_front(old(list)@.items, refreshed@);
            old(list)@.splice(
                front,
                0,
                refreshed@.subrange(
                    front,
                    front + refreshed@.len() - old(list)@.items.len(),
                ),
            )
        } else {
            old(list)@
        },
{
    let ghost current = list@.items;
    let n: usize = list.n_items() as usize;
    if refreshed.len() <= n {
        return false;
    }
    let mut prefix: usize = 0;
    while prefix < n && same_media_identity(list.item(prefix as u32).unwrap(), &refreshed[prefix])
        invariant
            list@.items == current,
            n == current.len(),
            current.len() <= u32::MAX,
            n < refreshed@.len(),
            prefix <= n,
            forall|k: int|
                0 <= k < prefix ==> same_photo(#[trigger] current[k], refreshed@[k]),
        decreases n - prefix,
    {
        prefix += 1;
    }
    proof {
        lemma_common_front_is(current, refreshed@, prefix as int);
    }
    let shift: usize = refreshed.len() - n;
    let mut suffix: usize = 0;
    while suffix < n - prefix && same_media_identity(
        list.item((n - 1 - suffix) as u32).unwrap(),
        &refreshed[refreshed.len() - 1 - suffix],
    )
        invariant
            list@.items == current,
            n == current.len(),
            current.len() <= u32::MAX,
            n < refreshed@.len(),
            shift == refreshed@.len() - n,
            prefix <= n,
            suffix <= n - prefix,
            forall|k: int|
                n - suffix <= k < n ==> same_photo(
                    #[trigger] current[k],
                    refreshed@[k + shift],
                ),
        decreases n - prefix - suffix,
    {
        suffix += 1;
    }
    if suffix != n - prefix {
        proof {
            let k = n - 1 - suffix;
            assert(!same_photo(current[k], refreshed@[k + shift]));
        }
        return false;
    }
    assert(surrounds(current, refreshed@, prefix as int));
    let end: usize = prefix + shift;
    let mut additions: Vec<MediaItem> = Vec::new();
    let mut i: usize = prefix;
    while i < end
        invariant
            prefix <= i <= end <= refreshed@.len(),
            additions@ =~= refreshed@.subrange(prefix as int, i as int),
        decreases end - i,
    {
        additions.push(refreshed[i].clone());
        i += 1;
    }
    list.splice(prefix as u32, 0, additions);
    true
}

/// The list after a refresh: one insertion where that is all it takes, else all
/// photos anew.
pub open spec fn refreshed_list(state: ListState, refreshed: Seq<MediaItem>) -> ListState {
    if is_pure_insertion(state.items, refreshed) {
        let front = common_front(state.items, refreshed);
        state.splice(
            front,
            0,
            refreshed.subrange(front, front + refreshed.len() - state.items.len()),
        )
    } else {
        state.splice(0, state.items.len() as int, refreshed)
    }
}

/// Bring the list up to date with the photos that the library has.
pub fn refresh_media_list(list: &mut MediaList, refreshed: &Vec<MediaItem>)
    requires
        old(list).wf(),
        refreshed@.len() <= u32::MAX,
    ensures
        final(list).wf(),
        final(list)@ == refreshed_list(old(list)@, refreshed@),
{
    if !apply_pure_insertions(list, refreshed) {
        let n: u32 = list.n_items();
        list.splice(0, n, clone_items(refreshed));
    }
}

/// After a refresh the list holds the photos that the library has, in its order,
/// and exactly one change was recorded.
pub proof fn a_refresh_shows_the_library(state: ListState, refreshed: Seq<MediaItem>)
    ensures
        refreshed_list(state, refreshed).items.len() == refreshed.len(),
        forall|k: int|
            0 <= k < refreshed.len() ==> same_photo(
                #[trigger] refreshed_list(state, refreshed).items[k],
                refreshed[k],
            ),
        forall|k: int|
            0 <= k < refreshed.len() ==> (#[trigger] refreshed_list(state, refreshed).items[k]).id
                == refreshed[k].id && refreshed_list(state, refreshed).items[k].uri@
                == refreshed[k].uri@,
        refreshed_list(state, refreshed).log.len() == state.log.len() + 1,
        is_pure_insertion(state.items, refreshed) ==> refreshed_list(
            state,
            refreshed,
        ).log.last().removed == 0,
{
    let after = refreshed_list(state, refreshed).items;
    if is_pure_insertion(state.items, refreshed) {
        let front = common_front(state.items, refreshed);
        lemma_common_front_bounds(state.items, refreshed);
        let shift = refreshed.len() - state.items.len();
        assert forall|k: int| 0 <= k < refreshed.len() implies same_photo(
            #[trigger] after[k],
            refreshed[k],
        ) by {
            if k < front {
                assert(after[k] == state.items[k]);
            } else if k < front + shift {
                assert(after[k] == refreshed[k]);
            } else {
                assert(after[k] == state.items[k - shift]);
            }
        }
    }
}

/// Photos that appear between those of the list, all in one place, are inserted
/// there, and nothing is removed.
pub proof fn new_photos_are_inserted(state: ListState, at: int, added: Seq<MediaItem>)
    requires
        0 <= at <= state.items.len(),
        added.len() > 0,
    ensures
        ({
            let refreshed = state.items.subrange(0, at) + added + state.items.subrange(
                at,
                state.items.len() as int,
            );
            let after = refreshed_list(state, refreshed);
            &&& after.log.len() == state.log.len() + 1
            &&& after.log.last().removed == 0
            &&& after.log.last().added.len() == added.len()
        }),
{
    let current = state.items;
    let refreshed = current.subrange(0, at) + added + current.subrange(at, current.len() as int);
    lemma_common_front_bounds(current, refreshed);
    lemma_common_front_reaches(current, refreshed, at);
    let front = common_front(current, refreshed);
    let shift = refreshed.len() - current.len();
    assert forall|k: int| front <= k < current.len() implies same_photo(
        #[trigger] current[k],
        refreshed[k + shift],
    ) by {
        assert(refreshed[k + shift] == current[k]);
    }
    assert forall|k: int| 0 <= k < front implies same_photo(
        #[trigger] current[k],
        refreshed[k],
    ) by {
        lemma_common_front_shares(current, refreshed, k);
    }
}

proof fn lemma_common_front_reaches(a: Seq<MediaItem>, b: Seq<MediaItem>, n: int)
    requires
        0 <= n <= a.len(),
        n <= b.len(),
        forall|k: int| 0 <= k < n ==> #[trigger] a[k] == b[k],
    ensures
        common_front(a, b) >= n,
    decreases n,
{
    lemma_common_front_bounds(a, b);
    if n > 0 {
        assert(a[0] == b[0]);
        let (x, y) = (a.subrange(1, a.len() as int), b.subrange(1, b.len() as int));
        assert forall|k: int| 0 <= k < n - 1 implies #[trigger] x[k] == y[k] by {
            assert(a[k + 1] == b[k + 1]);
        }
        lemma_common_front_reaches(x, y, n - 1);
    }
}

proof fn lemma_common_front_shares(a: Seq<MediaItem>, b: Seq<MediaItem>, k: int)
    requires
        0 <= k < common_front(a, b),
    ensures
        same_photo(a[k], b[k]),
    decreases k,
{
    if k > 0 {
        let (x, y) = (a.subrange(1, a.len() as int), b.subrange(1, b.len() as int));
        lemma_common_front_shares(x, y, k - 1);
        lemma_common_front_bounds(x, y);
        assert(x[k - 1] == a[k] && y[k - 1] == b[k]);
    }
}

proof fn lemma_common_front_bounds(a: Seq<MediaItem>, b: Seq<MediaItem>)
    ensures
        0 <= common_front(a, b) <= a.len(),
        common_front(a, b) <= b.len(),
    decreases a.len(),
{
    if a.len() > 0 && b.len() > 0 && same_photo(a[0], b[0]) {
        lemma_common_front_bounds(a.subrange(1, a.len() as int), b.subrange(1, b.len() as int));
    }
}

// ---------------------------------------------------------------------------
// The page

/// What the page shows.
#[derive(Clone, Copy, Debug, PartialEq, Eq, Structural)]
pub enum AlbumContent {
    /// A word that there are no photos.
    Empty,
    /// The photos, by day.
    DayGrid,
}

/// The page of an album.
pub struct AlbumDetailPage {
    pub album: Album,
    pub content: AlbumContent,
    pub has_db_actor: bool,
    pub has_nav: bool,
    pub viewer_open_pending: bool,
}

/// What activating a photo does.
pub enum ViewerOpening {
    /// The photo has left the album.
    Gone,
    /// A viewer is being opened already.
    Duplicate,
    /// There is nowhere to open a viewer.
    NoTarget,
    /// Another page is in front.
    NotVisible,
    /// Open the viewer.
    Open(ViewerRequest),
}

/// What a viewer is opened with.
pub struct ViewerRequest {
    pub query: MediaQuery,
    pub media_id: i64,
    pub index: u32,
    /// A change of favorites changes what the album holds.
    pub refresh_on_favorite: bool,
}

/// A search page to be opened.
pub struct SearchOpening {
    pub with_db_actor: bool,
}

/// A new cover for an album.
pub struct CoverChange {
    pub folder_path: String,
    pub cover_uri: String,
}

/// Where a step in the viewer leads.
#[derive(Clone, Copy, Debug, PartialEq, Eq, Structural)]
pub enum ViewerStep {
    /// Back to the album.
    Pop,
    /// To another photo.
    Show(u32),
    /// Nowhere: there is no further photo.
    Stay,
}

/// Where a step in the viewer leads; `None` is the step back to the album.
pub open spec fn viewer_step(current: u32, delta: Option<i32>, count: u32) -> ViewerStep {
    match delta {
        None => ViewerStep::Pop,
        Some(by) => {
            let target = if current + by > 0 { current + by } else { 0 };
            if target < count {
                ViewerStep::Show(target as u32)
            } else {
                ViewerStep::Stay
            }
        },
    }
}

/// Where a step in the viewer leads.
pub fn navigate_viewer(current: u32, delta: Option<i32>, count: u32) -> (step: ViewerStep)
    ensures
        step == viewer_step(current, delta, count),
{
    match delta {
        None => ViewerStep::Pop,
        Some(by) => {
            let sum: i64 = current as i64 + by as i64;
            let target: i64 = if sum > 0 {
                sum
            } else {
                0
            };
            if target < count as i64 {
                ViewerStep::Show(target as u32)
            } else {
                ViewerStep::Stay
            }
        },
    }
}

impl AlbumDetailPage {
    /// A page for an album whose photos are in `list`.
    pub fn new(album: Album, list: &MediaList) -> (page: AlbumDetailPage)
        requires
            list.wf(),
        ensures
            page.album == album,
            page.content == if list@.items.len() == 0 {
                AlbumContent::Empty
            } else {
                AlbumContent::DayGrid
            },
            !page.has_db_actor && !page.has_nav && !page.viewer_open_pending,
    {
        let content: AlbumContent = if list.n_items() == 0 {
            AlbumContent::Empty
        } else {
            AlbumContent::DayGrid
        };
        AlbumDetailPage {
            album,
            content,
            has_db_actor: false,
            has_nav: false,
            viewer_open_pending: false,
        }
    }

    /// Note that photos can be changed in the library.
    pub fn set_db_actor(&mut self)
        ensures
            *final(self) == (AlbumDetailPage { has_db_actor: true, ..*old(self) }),
    {
        self.has_db_actor = true;
    }

    /// Note that there is a place to open other pages in.
    pub fn set_nav_target(&mut self)
        ensures
            *final(self) == (AlbumDetailPage { has_nav: true, ..*old(self) }),
    {
        self.has_nav = true;
    }

    /// The folder of the album.
    pub fn album_folder_path(&self) -> (path: String)
        ensures
            path == self.album.folder_path,
    {
        self.album.folder_path.clone()
    }

    /// Whether photos are sent to the trash: there have to be some, and a
    /// library to note it in.
    pub fn can_trash(&self, ids: &Vec<i64>) -> (can: bool)
        ensures
            can == (self.has_db_actor && ids@.len() > 0),
    {
        self.has_db_actor && !ids.is_empty()
    }

    /// Whether the search page can be opened from here, and whether photos can
    /// be changed in it.
    pub fn open_search_page(&self) -> (opening: Option<SearchOpening>)
        ensures
            opening is Some <==> self.has_nav,
            opening matches Some(found) ==> found.with_db_actor == self.has_db_actor,
    {
        if self.has_nav {
            Some(SearchOpening { with_db_actor: self.has_db_actor })
        } else {
            None
        }
    }

    /// The cover that the photo `media_id` makes for the album; `None` when the
    /// photo has left it.
    pub fn set_album_cover_from_media(&self, list: &MediaList, media_id: i64) -> (change: Option<
        CoverChange,
    >)
        requires
            list.wf(),
        ensures
            change is Some <==> id_position(list@.items, media_id) < list@.items.len(),
            change matches Some(found) ==> found.folder_path == self.album.folder_path
                && found.cover_uri@ == list@.items[id_position(list@.items, media_id)].uri@,
    {
        match media_uri_for_id(list, media_id) {
            Some(cover_uri) => Some(
                CoverChange { folder_path: self.album.folder_path.clone(), cover_uri },
            ),
            None => None,
        }
    }

    /// Take photos that went to the trash out of the album's list and out of
    /// the list of the whole library.
    pub fn remove_media_ids_from_lists(
        &self,
        list: &mut MediaList,
        master: &mut MediaList,
        ids: &Vec<i64>,
    )
        requires
            old(list).wf(),
            old(master).wf(),
        ensures
            final(list).wf(),
            final(master).wf(),
            final(list)@ == without_ids(
                old(list)@,
                ids@.to_set(),
                old(list)@.items.len() as int,
            ),
            final(master)@ == without_ids(
                old(master)@,
                ids@.to_set(),
                old(master)@.items.len() as int,
            ),
    {
        let gone: IdSet = IdSet::from_ids(ids);
        remove_media_items_by_ids(list, &gone);
        remove_media_items_by_ids(master, &gone);
    }

    /// How many photos a refresh asks the library for: as many as it counted, as
    /// many as the album says where it could not count, and never more than the
    /// list may hold.
    pub fn refresh_load_limit(&self, counted: Option<u32>, config: &ListConfig) -> (limit: u32)
        ensures
            ({
                let total: int = match counted {
                    Some(count) => count as int,
                    None => self.album.photo_count as int,
                };
                limit == if total < 0 {
                    0
                } else if total < config.ui_media_list_cap {
                    total
                } else {
                    config.ui_media_list_cap as int
                }
            }),
            limit == refresh_limit(
                match counted {
                    Some(count) => count as int,
                    None => self.album.photo_count as int,
                },
                config.ui_media_list_cap as int,
            ),
    {
        let total: i64 = match counted {
            Some(count) => count as i64,
            None => self.album.photo_count,
        };
        album_refresh_load_limit(total, config)
    }

    /// What activating the photo `media_id` does; `page_visible` says whether
    /// the page is in front.
    pub open spec fn activation(
        self,
        items: Seq<MediaItem>,
        media_id: i64,
        page_visible: bool,
    ) -> ViewerOpening {
        let index = id_position(items, media_id);
        if index >= items.len() {
            ViewerOpening::Gone
        } else if self.viewer_open_pending {
            ViewerOpening::Duplicate
        } else if !self.has_nav {
            ViewerOpening::NoTarget
        } else if !page_visible {
            ViewerOpening::NotVisible
        } else {
            ViewerOpening::Open(
                ViewerRequest {
                    query: album_query(self.album),
                    media_id,
                    index: index as u32,
                    refresh_on_favorite: self.album.kind == AlbumKind::Favorites,
                },
            )
        }
    }

    /// Answer the activation of a photo. Once a viewer is being opened, further
    /// activations are ignored until `viewer_guard_elapsed`.
    pub fn open_viewer(&mut self, list: &MediaList, media_id: i64, page_visible: bool) -> (opening:
        ViewerOpening)
        requires
            list.wf(),
        ensures
            opening == old(self).activation(list@.items, media_id, page_visible),
            *final(self) == (AlbumDetailPage {
                viewer_open_pending: old(self).viewer_open_pending || opening is Open,
                ..*old(self)
            }),
    {
        match index_for_media_id(list, media_id) {
            None => ViewerOpening::Gone,
            Some(index) => {
                if self.viewer_open_pending {
                    return ViewerOpening::Duplicate;
                }
                if !self.has_nav {
                    return ViewerOpening::NoTarget;
                }
                if !page_visible {
                    return ViewerOpening::NotVisible;
                }
                self.viewer_open_pending = true;
                ViewerOpening::Open(
                    ViewerRequest {
                        query: media_query_for_album(&self.album),
                        media_id,
                        index,
                        refresh_on_favorite: self.album.kind == AlbumKind::Favorites,
                    },
                )
            },
        }
    }

    /// A moment has passed since the viewer was opened.
    pub fn viewer_guard_elapsed(&mut self)
        ensures
            *final(self) == (AlbumDetailPage { viewer_open_pending: false, ..*old(self) }),
    {
        self.viewer_open_pending = false;
    }
}

/// Two activations in a row open one viewer.
pub proof fn double_activation_opens_once(
    page: AlbumDetailPage,
    items: Seq<MediaItem>,
    first: i64,
    second: i64,
    page_visible: bool,
)
    requires
        page.activation(items, first, page_visible) is Open,
    ensures
        !((AlbumDetailPage { viewer_open_pending: true, ..page }).activation(
            items,
            second,
            page_visible,
        ) is Open),
{
}

/// A step leads as many photos on as it says, as long as there is such a photo.
/// A step off the front leads to the first photo, one off the end nowhere, and
/// the step back to the album out of the viewer.
pub proof fn viewer_steps_count_photos(current: u32, by: i32, count: u32)
    requires
        current < count,
    ensures
        0 <= current + by < count ==> (viewer_step(current, Some(by), count) matches
            ViewerStep::Show(next) && next - current == by),
        current + by < 0 ==> viewer_step(current, Some(by), count) == ViewerStep::Show(0),
        current + by >= count ==> viewer_step(current, Some(by), count) == ViewerStep::Stay,
        viewer_step(current, None, count) == ViewerStep::Pop,
{
}

/// A photo with a neighbour on both sides: stepping on and stepping back again
/// ends where it began, whichever comes first.
pub proof fn viewer_steps_lead_back(current: u32, by: i32, count: u32)
    requires
        by > i32::MIN,
        0 <= current + by < count,
        current < count,
    ensures
        viewer_step(current, Some(by), count) matches ViewerStep::Show(next) && viewer_step(
            next,
            Some((-by) as i32),
            count,
        ) == ViewerStep::Show(current),
        0 < current ==> viewer_step(current, Some(-1i32), count) == ViewerStep::Show(
            (current - 1) as u32,
        ),
        current + 1 < count ==> viewer_step(current, Some(1), count) == ViewerStep::Show(
            (current + 1) as u32,
        ),
{
}

/// A viewer opens on the photo that was activated, at its place in the album and
/// with the album's photos to step through. It opens exactly where the album
/// holds the photo, the page is in front and has somewhere to open it, and none
/// is being opened already.
pub proof fn viewers_open_on_the_photo(
    page: AlbumDetailPage,
    items: Seq<MediaItem>,
    media_id: i64,
    page_visible: bool,
)
    requires
        items.len() <= u32::MAX,
    ensures
        page.activation(items, media_id, page_visible) is Open <==> page.has_nav
            && !page.viewer_open_pending && page_visible && exists|k: int|
            0 <= k < items.len() && (#[trigger] items[k]).id == media_id,
        page.activation(items, media_id, page_visible) is Gone <==> forall|k: int|
            0 <= k < items.len() ==> (#[trigger] items[k]).id != media_id,
        page.activation(items, media_id, page_visible) matches ViewerOpening::Open(request) ==> {
            &&& request.media_id == media_id
            &&& request.index < items.len()
            &&& items[request.index as int].id == media_id
            &&& forall|k: int| 0 <= k < request.index ==> (#[trigger] items[k]).id != media_id
            &&& request.query == album_query(page.album)
            &&& request.refresh_on_favorite <==> page.album.kind == AlbumKind::Favorites
        },
{
    ids_are_found_at_their_first_place(items, media_id);
}

} // verus!
