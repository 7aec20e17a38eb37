//! What a tile shows of its photo, before and after its thumbnail arrives.

use super::ViewSpec;
use crate::calendar::Timestamp;
use crate::media::{thumbnail_request_mtime, GroupBy, MediaItem, ThumbnailSize, ThumbnailTier};
use crate::media_list::{media_item_at, MediaList};
use crate::text::{decimal_text, two_digit_text};
#[allow(unused_imports)]
use crate::text::{
    decimal, decimal_texts_are_unique, decimal_texts_read_back, number_in, two_digits, two_digits_read_back,
};
use super::board::DisplayedItem;
use super::selection::SelectionMode;
use vstd::prelude::*;

verus! {

// ---------------------------------------------------------------------------
// Texts

/// The length of a video: hours only where there are any.
pub open spec fn duration_text(seconds: int) -> Seq<char> {
    let minutes = (seconds % 3600) / 60;
    let tail = two_digits(minutes) + seq![':'] + two_digits(seconds % 60);
    if seconds >= 3600 {
        decimal(seconds / 3600) + seq![':'] + tail
    } else {
        tail
    }
}

/// The length of a video, given in whole seconds.
pub fn format_tile_duration(seconds: Option<u64>) -> (text: Option<String>)
    ensures
        text is Some <==> seconds is Some,
        text matches Some(shown) ==> shown@ == duration_text(seconds->0 as int),
{
    match seconds {
        Some(total) => {
            proof {
                reveal_strlit(":");
            }
            let hours: u64 = total / 3600;
            let minutes: String = two_digit_text((total % 3600) / 60);
            let rest: String = two_digit_text(total % 60);
            let mut text: String = String::new();
            if hours > 0 {
                let lead: String = decimal_text(hours);
                text.append(lead.as_str());
                text.append(":");
            }
            text.append(minutes.as_str());
            text.append(":");
            text.append(rest.as_str());
            assert(text@ =~= duration_text(total as int));
            Some(text)
        },
        None => None,
    }
}

/// The thumbnail progress of the library in words.
pub open spec fn stats_text(total: int, generated: int) -> Seq<char> {
    let done = if generated < total { generated } else { total };
    "媒体 "@ + decimal(total) + " 项 · 缩略图 "@ + decimal(done) + "/"@ + decimal(total)
}

/// The thumbnail progress of the library in words; never more thumbnails than
/// photos.
pub fn library_stats_text(total_media: usize, generated: usize) -> (text: String)
    ensures
        text@ == stats_text(total_media as int, generated as int),
{
    let done: usize = if generated < total_media {
        generated
    } else {
        total_media
    };
    let total: String = decimal_text(total_media as u64);
    let part: String = decimal_text(done as u64);
    let mut text: String = String::new();
    text.append("媒体 ");
    text.append(total.as_str());
    text.append(" 项 · 缩略图 ");
    text.append(part.as_str());
    text.append("/");
    text.append(total.as_str());
    assert(text@ =~= stats_text(total_media as int, generated as int));
    text
}

// ---------------------------------------------------------------------------
// Tiles

/// What a thumbnail is found by.
pub struct ThumbKey {
    pub uri: String,
    pub size: ThumbnailSize,
    pub mtime: Timestamp,
}

impl Clone for ThumbKey {
    fn clone(&self) -> (copy: Self)
        ensures
            copy == *self,
    {
        ThumbKey { uri: self.uri.clone(), size: self.size, mtime: self.mtime }
    }
}

/// A thumbnail to be loaded.
pub struct ThumbRequest {
    pub media_id: i64,
    pub key: ThumbKey,
    pub tier: ThumbnailTier,
}

/// What the thumbnail of a photo is found by.
pub open spec fn key_of(item: MediaItem, size: ThumbnailSize) -> ThumbKey {
    ThumbKey { uri: item.uri, size, mtime: item.file_mtime }
}

/// The request for the thumbnail of a photo in a grid, which goes before others.
pub open spec fn request_for(item: MediaItem, size: ThumbnailSize) -> ThumbRequest {
    ThumbRequest { media_id: item.id, key: key_of(item, size), tier: ThumbnailTier::Boost }
}

fn thumbnail_key(item: &MediaItem, size: ThumbnailSize) -> (key: ThumbKey)
    ensures
        key == key_of(*item, size),
{
    ThumbKey { uri: item.uri.clone(), size, mtime: thumbnail_request_mtime(item) }
}

/// The request for the thumbnail of a photo, as a view shows it.
pub fn thumbnail_request(spec: ViewSpec, item: &MediaItem) -> (request: ThumbRequest)
    ensures
        request == request_for(*item, spec.thumb_size),
{
    ThumbRequest {
        media_id: item.id,
        key: thumbnail_key(item, spec.thumb_size),
        tier: ThumbnailTier::Boost,
    }
}

/// Where a tile has its photo from.
pub struct ThumbSource {
    /// The photo that the tile was made for.
    pub item: MediaItem,
    /// Its place in the list at that time.
    pub global_index: u32,
    /// The view that the tile was made for.
    pub spec: ViewSpec,
}

impl ThumbSource {
    /// The photo that a thumbnail is asked for: the one at the place in the list,
    /// or the one that the tile was made for when the list has become shorter.
    pub open spec fn current(self, items: Seq<MediaItem>) -> MediaItem {
        if self.global_index < items.len() {
            items[self.global_index as int]
        } else {
            self.item
        }
    }
}

/// A tile as it looks, and what it asks for.
pub struct PhotoPicture {
    pub target: i32,
    pub motion_badge: bool,
    pub duration: Option<String>,
    pub favorite_badge: bool,
    /// The thumbnail has not arrived.
    pub loading: bool,
    /// The tile shows a frame where its thumbnail will be.
    pub placeholder: bool,
    pub background_is_light: Option<bool>,
    /// The thumbnail has been asked for.
    pub requested: bool,
    /// What the tile asks a thumbnail for; a tile without a photo asks for none.
    pub source: Option<ThumbSource>,
    /// What the thumbnail of the tile is found by.
    pub cache_key: Option<ThumbKey>,
}

/// What is known of a photo besides its entry in the list.
#[derive(Clone, Copy, Debug, PartialEq, Eq, Structural)]
pub struct MediaKind {
    pub is_motion_photo: bool,
    pub is_video: bool,
}

/// The length that a tile shows: only on videos, only in the day view.
pub open spec fn shown_duration(
    mode: GroupBy,
    item: MediaItem,
    kind: MediaKind,
) -> Option<Seq<char>> {
    if mode == GroupBy::Day && kind.is_video {
        Some(
            match item.video_duration_secs {
                Some(seconds) => duration_text(seconds as int),
                None => "--:--"@,
            },
        )
    } else {
        None
    }
}

/// The text of an optional label.
pub open spec fn label_text(label: Option<String>) -> Option<Seq<char>> {
    match label {
        Some(text) => Some(text@),
        None => None,
    }
}

impl PhotoPicture {
    /// Are size and badges those of a photo in a view? Badges are for the day
    /// view alone.
    pub open spec fn dressed_for(self, spec: ViewSpec, item: MediaItem, kind: MediaKind) -> bool {
        &&& self.target == spec.pixel_size
        &&& self.motion_badge == (spec.mode == GroupBy::Day && kind.is_motion_photo)
        &&& label_text(self.duration) == shown_duration(spec.mode, item, kind)
        &&& self.favorite_badge == (spec.mode == GroupBy::Day && item.is_favorite)
    }

    /// Was the tile made for a photo, and has it asked for nothing yet?
    pub open spec fn made_for(self, spec: ViewSpec, item: MediaItem, global_index: u32) -> bool {
        &&& !self.requested
        &&& self.source == Some(ThumbSource { item, global_index, spec })
        &&& self.cache_key == Some(key_of(item, spec.thumb_size))
    }

    /// What the tile asks for when the list holds `items`.
    pub open spec fn request(self, items: Seq<MediaItem>) -> Option<ThumbRequest> {
        match self.source {
            Some(source) => if self.requested {
                None
            } else {
                Some(request_for(source.current(items), source.spec.thumb_size))
            },
            None => None,
        }
    }

    /// The tile after it asked.
    pub open spec fn after_request(self, items: Seq<MediaItem>) -> PhotoPicture {
        match self.request(items) {
            Some(request) => PhotoPicture {
                requested: true,
                cache_key: Some(request.key),
                ..self
            },
            None => self,
        }
    }

    /// The tile after it was told to ask time and again, while the list held the
    /// items of `lists` in turn.
    pub open spec fn after_requests(self, lists: Seq<Seq<MediaItem>>) -> PhotoPicture
        decreases lists.len(),
    {
        if lists.len() == 0 {
            self
        } else {
            self.after_requests(lists.drop_last()).after_request(lists.last())
        }
    }

    /// All that the tile asks for when it is told to time and again.
    pub open spec fn requests(self, lists: Seq<Seq<MediaItem>>) -> Seq<ThumbRequest>
        decreases lists.len(),
    {
        if lists.len() == 0 {
            Seq::empty()
        } else {
            let before = self.requests(lists.drop_last());
            match self.after_requests(lists.drop_last()).request(lists.last()) {
                Some(request) => before.push(request),
                None => before,
            }
        }
    }

    /// Is the cell around the tile visible? A tile that waits without a frame
    /// is not.
    pub open spec fn visible(self) -> bool {
        !self.loading || self.placeholder
    }
}

fn duration_label(mode: GroupBy, item: &MediaItem, kind: MediaKind) -> (label: Option<String>)
    ensures
        label_text(label) == shown_duration(mode, *item, kind),
{
    if mode == GroupBy::Day && kind.is_video {
        match format_tile_duration(item.video_duration_secs) {
            Some(text) => Some(text),
            None => Some("--:--".to_owned()),
        }
    } else {
        None
    }
}

/// Make the tile of the photo at `global_index` of the list. `cached` holds the thumbnail that is at hand, as
/// far as it matters here: whether its background is light, where that is known.
/// Without one the tile waits, out of sight if `hide_until_ready`, else behind a
/// frame.
pub fn build_photo_picture(
    spec: ViewSpec,
    item: &MediaItem,
    kind: MediaKind,
    global_index: u32,
    cached: Option<Option<bool>>,
    hide_until_ready: bool,
) -> (tile: PhotoPicture)
    ensures
        tile.dressed_for(spec, *item, kind),
        tile.loading == cached is None,
        tile.placeholder == (cached is None && !hide_until_ready),
        tile.background_is_light == match cached {
            Some(light) => light,
            None => None,
        },
        tile.made_for(spec, *item, global_index),
{
    let is_day: bool = spec.mode == GroupBy::Day;
    PhotoPicture {
        target: spec.pixel_size,
        motion_badge: is_day && kind.is_motion_photo,
        duration: duration_label(spec.mode, item, kind),
        favorite_badge: is_day && item.is_favorite,
        loading: cached.is_none(),
        placeholder: cached.is_none() && !hide_until_ready,
        background_is_light: match cached {
            Some(light) => light,
            None => None,
        },
        requested: false,
        source: Some(ThumbSource { item: item.clone(), global_index, spec }),
        cache_key: Some(thumbnail_key(item, spec.thumb_size)),
    }
}

/// Dress a tile that a rebuild keeps. Its thumbnail stays, so that it asks for
/// none.
pub fn prepare_reused_tile(
    tile: &mut PhotoPicture,
    spec: ViewSpec,
    item: &MediaItem,
    kind: MediaKind,
)
    ensures
        final(tile).dressed_for(spec, *item, kind),
        final(tile).loading == old(tile).loading,
        final(tile).placeholder == old(tile).placeholder,
        final(tile).background_is_light == old(tile).background_is_light,
        final(tile).requested,
        final(tile).source == old(tile).source,
        final(tile).cache_key == Some(key_of(*item, spec.thumb_size)),
{
    let is_day: bool = spec.mode == GroupBy::Day;
    tile.target = spec.pixel_size;
    tile.motion_badge = is_day && kind.is_motion_photo;
    tile.duration = duration_label(spec.mode, item, kind);
    tile.favorite_badge = is_day && item.is_favorite;
    tile.requested = true;
    tile.cache_key = Some(thumbnail_key(item, spec.thumb_size));
}

/// Is the cell around the tile visible?
pub fn sync_flow_child_visibility_for_tile(tile: &PhotoPicture) -> (visible: bool)
    ensures
        visible == tile.visible(),
{
    !tile.loading || tile.placeholder
}

impl PhotoPicture {
    /// Ask for the thumbnail, at most once. Returns the request to make: for the
    /// photo at the place of the tile in the list, or for the one that the tile
    /// was made for when the list has become shorter. The tile is found by the
    /// thumbnail of that photo from now on.
    pub fn request_thumbnail(&mut self, list: &MediaList) -> (request: Option<ThumbRequest>)
        ensures
            request == old(self).request(list@.items),
            *final(self) == old(self).after_request(list@.items),
    {
        if self.requested {
            return None;
        }
        let request: ThumbRequest = match &self.source {
            None => {
                return None;
            },
            Some(source) => match media_item_at(list, source.global_index) {
                Some(item) => thumbnail_request(source.spec, &item),
                None => thumbnail_request(source.spec, &source.item),
            },
        };
        self.requested = true;
        self.cache_key = Some(request.key.clone());
        Some(request)
    }

    /// Take the result of a thumbnail request: `None` stands for a failure,
    /// which shows a plain gray picture. Either way the tile comes into sight.
    /// Returns whether the brightness of the background became known.
    pub fn finish_thumbnail(&mut self, loaded: Option<Option<bool>>) -> (background_changed: bool)
        ensures
            background_changed == (loaded matches Some(light) && light is Some),
            *final(self) == (PhotoPicture {
                loading: false,
                placeholder: false,
                background_is_light: if background_changed {
                    loaded->0
                } else {
                    old(self).background_is_light
                },
                ..*old(self)
            }),
            final(self).visible(),
    {
        let mut background_changed: bool = false;
        match loaded {
            Some(light) => {
                if light.is_some() {
                    self.background_is_light = light;
                    background_changed = true;
                }
            },
            None => {},
        }
        self.loading = false;
        self.placeholder = false;
        background_changed
    }
}

/// Make one of the tiles that stand for a page on its way: a frame.
pub fn virtual_placeholder_tile(spec: ViewSpec) -> (tile: PhotoPicture)
    ensures
        tile.target == spec.pixel_size,
        tile.loading,
        tile.placeholder,
        tile.visible(),
        !tile.motion_badge && tile.duration is None && !tile.favorite_badge,
        tile.background_is_light is None,
        !tile.requested,
        tile.source is None && tile.cache_key is None,
{
    PhotoPicture {
        target: spec.pixel_size,
        motion_badge: false,
        duration: None,
        favorite_badge: false,
        loading: true,
        placeholder: true,
        background_is_light: None,
        requested: false,
        source: None,
        cache_key: None,
    }
}

/// The box of tiles that stand for a page that is being loaded.
pub struct PlaceholderFlow {
    /// The style class that tells the box from a section.
    pub css_class: &'static str,
    pub selection_mode: SelectionMode,
    pub tiles: Vec<PhotoPicture>,
}

/// The tiles that stand for a page that is being loaded. None of them can be
/// selected.
pub fn build_virtual_placeholder_flow(spec: ViewSpec, count: u32) -> (flow: PlaceholderFlow)
    ensures
        flow.css_class@ == "virtual-placeholder-grid"@,
        flow.selection_mode == SelectionMode::Disabled,
        flow.tiles@.len() == count,
        forall|k: int|
            0 <= k < count ==> {
                let tile = #[trigger] flow.tiles@[k];
                &&& tile.target == spec.pixel_size
                &&& tile.loading && tile.placeholder && tile.visible()
                &&& !tile.motion_badge && tile.duration is None && !tile.favorite_badge
                &&& tile.background_is_light is None && !tile.requested
                &&& tile.source is None && tile.cache_key is None
            },
{
    let mut tiles: Vec<PhotoPicture> = Vec::new();
    let mut i: u32 = 0;
    while i < count
        invariant
            i <= count,
            tiles@.len() == i,
            forall|k: int|
                0 <= k < i ==> {
                    let tile = #[trigger] tiles@[k];
                    &&& tile.target == spec.pixel_size
                    &&& tile.loading && tile.placeholder && tile.visible()
                    &&& !tile.motion_badge && tile.duration is None && !tile.favorite_badge
                    &&& tile.background_is_light is None && !tile.requested
                    &&& tile.source is None && tile.cache_key is None
                },
        decreases count - i,
    {
        tiles.push(virtual_placeholder_tile(spec));
        i += 1;
    }
    PlaceholderFlow {
        css_class: "virtual-placeholder-grid",
        selection_mode: SelectionMode::Disabled,
        tiles,
    }
}

/// However often a new tile is told to ask, it asks exactly once: for the photo
/// at its place in the list at the first time, or for its own photo when the
/// list has become shorter. The request carries the id, the uri, the time of that
/// photo and the size of the view, and goes before others. From then on the tile
/// is found by the thumbnail of that very photo.
pub proof fn thumbnails_are_asked_for_once(
    tile: PhotoPicture,
    spec: ViewSpec,
    item: MediaItem,
    global_index: u32,
    lists: Seq<Seq<MediaItem>>,
)
    requires
        tile.made_for(spec, item, global_index),
        lists.len() > 0,
    ensures
        ({
            let first = lists[0];
            let current = if global_index < first.len() {
                first[global_index as int]
            } else {
                item
            };
            let asked = tile.requests(lists);
            &&& asked.len() == 1
            &&& asked[0].media_id == current.id
            &&& asked[0].key.uri == current.uri
            &&& asked[0].key.size == spec.thumb_size
            &&& asked[0].key.mtime == current.file_mtime
            &&& asked[0].tier == ThumbnailTier::Boost
            &&& tile.after_requests(lists).requested
            &&& tile.after_requests(lists).cache_key == Some(asked[0].key)
        }),
    decreases lists.len(),
{
    let front = lists.drop_last();
    if front.len() > 0 {
        thumbnails_are_asked_for_once(tile, spec, item, global_index, front);
        assert(front[0] == lists[0]);
    } else {
        assert(tile.after_requests(front) == tile);
        assert(tile.requests(front) =~= Seq::<ThumbRequest>::empty());
    }
}

/// A tile that a rebuild keeps, or one without a photo, never asks.
pub proof fn tiles_in_use_ask_for_nothing(tile: PhotoPicture, lists: Seq<Seq<MediaItem>>)
    requires
        tile.requested || tile.source is None,
    ensures
        tile.requests(lists).len() == 0,
        tile.after_requests(lists) == tile,
    decreases lists.len(),
{
    if lists.len() > 0 {
        tiles_in_use_ask_for_nothing(tile, lists.drop_last());
    }
}

// ---------------------------------------------------------------------------
// Keeping tiles

/// The tile that shows the photo `id` with its thumbnail, the last one where
/// there are several; `loading` says of each displayed photo whether its
/// thumbnail is missing.
pub open spec fn loaded_tile(
    displayed: Seq<DisplayedItem>,
    loading: Seq<bool>,
    id: i64,
) -> Option<u64>
    decreases displayed.len(),
{
    if displayed.len() == 0 {
        None
    } else if displayed.last().media_id == id && !loading[displayed.len() - 1] {
        Some(displayed.last().flow_child)
    } else {
        loaded_tile(displayed.drop_last(), loading, id)
    }
}

/// The old tile that the `k`th displayed photo of a rebuilt grid takes over: a
/// tile with its thumbnail, and each tile only once.
pub open spec fn reused_tile(
    before: Seq<DisplayedItem>,
    loading: Seq<bool>,
    after: Seq<DisplayedItem>,
    k: int,
) -> Option<u64> {
    if exists|j: int| 0 <= j < k && (#[trigger] after[j]).media_id == after[k].media_id {
        None
    } else {
        loaded_tile(before, loading, after[k].media_id)
    }
}

fn find_loaded_tile(before: &Vec<DisplayedItem>, loading: &Vec<bool>, id: i64) -> (tile: Option<
    u64,
>)
    requires
        before@.len() == loading@.len(),
    ensures
        tile == loaded_tile(before@, loading@, id),
{
    let mut i: usize = before.len();
    assert(before@.subrange(0, before@.len() as int) =~= before@);
    while i > 0
        invariant
            i <= before@.len(),
            before@.len() == loading@.len(),
            loaded_tile(before@, loading@, id) == loaded_tile(
                before@.subrange(0, i as int),
                loading@,
                id,
            ),
        decreases i,
    {
        let item: DisplayedItem = before[i - 1];
        assert(before@.subrange(0, i as int).last() == item);
        assert(before@.subrange(0, i as int).drop_last() =~= before@.subrange(0, i - 1));
        if item.media_id == id && !loading[i - 1] {
            return Some(item.flow_child);
        }
        i -= 1;
    }
    None
}

/// Which old tile each displayed photo of a rebuilt grid takes over, so that
/// photos with a thumbnail do not turn gray again.
pub fn plan_tile_reuse(
    before: &Vec<DisplayedItem>,
    loading: &Vec<bool>,
    after: &Vec<DisplayedItem>,
) -> (reuse: Vec<Option<u64>>)
    requires
        before@.len() == loading@.len(),
    ensures
        reuse@.len() == after@.len(),
        forall|k: int|
            0 <= k < after@.len() ==> #[trigger] reuse@[k] == reused_tile(
                before@,
                loading@,
                after@,
                k,
            ),
{
    let mut reuse: Vec<Option<u64>> = Vec::new();
    let mut k: usize = 0;
    while k < after.len()
        invariant
            before@.len() == loading@.len(),
            k <= after@.len(),
            reuse@.len() == k,
            forall|j: int|
                0 <= j < k ==> #[trigger] reuse@[j] == reused_tile(before@, loading@, after@, j),
        decreases after@.len() - k,
    {
        let id: i64 = after[k].media_id;
        let mut j: usize = 0;
        while j < k && after[j].media_id != id
            invariant
                j <= k < after@.len(),
                id == after@[k as int].media_id,
                forall|i: int| 0 <= i < j ==> (#[trigger] after@[i]).media_id != id,
            decreases k - j,
        {
            j += 1;
        }
        let tile: Option<u64> = if j < k {
            assert(after@[j as int].media_id == after@[k as int].media_id);
            None
        } else {
            find_loaded_tile(before, loading, id)
        };
        assert(tile == reused_tile(before@, loading@, after@, k as int));
        reuse.push(tile);
        k += 1;
    }
    reuse
}

proof fn lemma_loaded_tile(displayed: Seq<DisplayedItem>, loading: Seq<bool>, id: i64)
    ensures
        loaded_tile(displayed, loading, id) matches Some(tile) ==> exists|k: int|
            0 <= k < displayed.len() && (#[trigger] displayed[k]).flow_child == tile
                && displayed[k].media_id == id && !loading[k],
        loaded_tile(displayed, loading, id) is None ==> forall|k: int|
            0 <= k < displayed.len() && (#[trigger] displayed[k]).media_id == id ==> loading[k],
    decreases displayed.len(),
{
    if displayed.len() > 0 {
        lemma_loaded_tile(displayed.drop_last(), loading, id);
        let front = displayed.drop_last();
        if displayed.last().media_id == id && !loading[displayed.len() - 1] {
            assert(displayed[displayed.len() - 1].flow_child == displayed.last().flow_child);
        } else {
            match loaded_tile(front, loading, id) {
                Some(tile) => {
                    let k = choose|k: int|
                        0 <= k < front.len() && (#[trigger] front[k]).flow_child == tile
                            && front[k].media_id == id && !loading[k];
                    assert(displayed[k] == front[k]);
                },
                None => {
                    assert forall|k: int|
                        0 <= k < displayed.len() && (
                        #[trigger] displayed[k]).media_id == id implies loading[k] by {
                        if k < front.len() {
                            assert(front[k] == displayed[k]);
                        }
                    }
                },
            }
        }
    }
}

/// A photo that was displayed with its thumbnail keeps its tile through a
/// rebuild that shows it, and no two photos take over the same tile.
pub proof fn loaded_tiles_are_kept_once(
    before: Seq<DisplayedItem>,
    loading: Seq<bool>,
    after: Seq<DisplayedItem>,
    j: int,
    k: int,
)
    requires
        super::board::children_unique(before),
        0 <= j < k < after.len(),
    ensures
        reused_tile(before, loading, after, j) is Some && reused_tile(before, loading, after, k)
            is Some ==> reused_tile(before, loading, after, j) != reused_tile(
            before,
            loading,
            after,
            k,
        ),
        (forall|i: int| 0 <= i < k ==> (#[trigger] after[i]).media_id != after[k].media_id) && (
        exists|d: int|
            0 <= d < before.len() && (#[trigger] before[d]).media_id == after[k].media_id
                && !loading[d]) ==> reused_tile(before, loading, after, k) is Some,
{
    lemma_loaded_tile(before, loading, after[j].media_id);
    lemma_loaded_tile(before, loading, after[k].media_id);
    let (a, b) = (reused_tile(before, loading, after, j), reused_tile(before, loading, after, k));
    if a is Some && b is Some && a == b {
        let x = choose|x: int|
            0 <= x < before.len() && (#[trigger] before[x]).flow_child == a->0
                && before[x].media_id == after[j].media_id && !loading[x];
        let y = choose|y: int|
            0 <= y < before.len() && (#[trigger] before[y]).flow_child == b->0
                && before[y].media_id == after[k].media_id && !loading[y];
        if x < y {
            assert(before[x].flow_child != before[y].flow_child);
        } else if y < x {
            assert(before[y].flow_child != before[x].flow_child);
        }
        assert(after[j].media_id == after[k].media_id);
    }
}

/// The text of a length tells all of it: two digits of seconds, two of minutes
/// and in front of them the hours, where there are any, with colons between.
pub proof fn lengths_are_told_in_full(seconds: int)
    requires
        0 <= seconds,
    ensures
        ({
            let text = duration_text(seconds);
            let n = text.len() as int;
            let hours = if n > 5 { number_in(text.subrange(0, n - 6)) } else { 0 };
            let minutes = number_in(text.subrange(n - 5, n - 3));
            let rest = number_in(text.subrange(n - 2, n));
            &&& n >= 5
            &&& n > 5 <==> seconds >= 3600
            &&& text[n - 3] == ':'
            &&& n > 5 ==> text[n - 6] == ':'
            &&& 0 <= minutes < 60 && 0 <= rest < 60
            &&& 3600 * hours + 60 * minutes + rest == seconds
        }),
{
    let (hours, minutes, rest) = (seconds / 3600, (seconds % 3600) / 60, seconds % 60);
    lemma_clock(seconds);
    decimal_texts_read_back(hours);
    assert(duration_text(seconds) == clock_text(hours, minutes, rest, seconds >= 3600));
    lemma_clock_text(hours, minutes, rest, seconds >= 3600);
}

spec fn clock_text(hours: int, minutes: int, rest: int, long: bool) -> Seq<char> {
    let tail = two_digits(minutes) + seq![':'] + two_digits(rest);
    if long {
        decimal(hours) + seq![':'] + tail
    } else {
        tail
    }
}

proof fn lemma_clock(seconds: int)
    requires
        0 <= seconds,
    ensures
        0 <= (seconds % 3600) / 60 < 60,
        0 <= seconds % 60 < 60,
        3600 * (seconds / 3600) + 60 * ((seconds % 3600) / 60) + seconds % 60 == seconds,
        seconds < 3600 ==> seconds / 3600 == 0,
        0 <= seconds / 3600,
{
    let within = seconds % 3600;
    assert(within % 60 == seconds % 60) by {
        assert(seconds == 60 * (60 * (seconds / 3600)) + within);
    }
}

proof fn lemma_clock_text(hours: int, minutes: int, rest: int, long: bool)
    requires
        0 <= hours,
        0 <= minutes < 60,
        0 <= rest < 60,
    ensures
        ({
            let text = clock_text(hours, minutes, rest, long);
            let n = text.len() as int;
            &&& n >= 5
            &&& n > 5 <==> long
            &&& text[n - 3] == ':'
            &&& long ==> text[n - 6] == ':' && text.subrange(0, n - 6) == decimal(hours)
            &&& number_in(text.subrange(n - 5, n - 3)) == minutes
            &&& number_in(text.subrange(n - 2, n)) == rest
        }),
{
    two_digits_read_back(minutes);
    two_digits_read_back(rest);
    let text = clock_text(hours, minutes, rest, long);
    let n = text.len() as int;
    assert(text.subrange(n - 2, n) =~= two_digits(rest));
    assert(text.subrange(n - 5, n - 3) =~= two_digits(minutes));
    if long {
        assert(text.subrange(0, n - 6) =~= decimal(hours));
    }
}

/// Badges are for the day view: there a tile says whether its photo is a favorite,
/// a motion photo or a video, and how long. In the other views it says nothing.
pub proof fn badges_are_for_the_day_view(
    tile: PhotoPicture,
    spec: ViewSpec,
    item: MediaItem,
    kind: MediaKind,
)
    requires
        tile.dressed_for(spec, item, kind),
    ensures
        tile.favorite_badge <==> spec.mode == GroupBy::Day && item.is_favorite,
        tile.motion_badge <==> spec.mode == GroupBy::Day && kind.is_motion_photo,
        tile.duration is Some <==> spec.mode == GroupBy::Day && kind.is_video,
        tile.duration is Some && item.video_duration_secs is Some ==> (tile.duration->0)@
            == duration_text(item.video_duration_secs->0 as int),
{
}

/// A tile asks for the thumbnail of the photo that stands at its place, by the
/// photo's own address and change, in the size of its view, and before others.
pub proof fn thumbnails_are_those_of_the_photo(tile: PhotoPicture, items: Seq<MediaItem>)
    requires
        tile.source is Some,
        !tile.requested,
        tile.source->0.global_index < items.len(),
    ensures
        ({
            let photo = items[tile.source->0.global_index as int];
            tile.request(items) matches Some(request) && request.media_id == photo.id
                && request.key.uri == photo.uri && request.key.mtime == photo.file_mtime
                && request.key.size == tile.source->0.spec.thumb_size && request.tier
                == ThumbnailTier::Boost
        }),
        tile.after_request(items).cache_key is Some,
        tile.request(items) is Some ==> tile.after_request(items).cache_key == Some(
            tile.request(items)->0.key,
        ),
{
}

/// A tile that is taken over shows the photo that takes it over, with its
/// thumbnail.
pub proof fn tiles_are_taken_over_by_their_photo(
    before: Seq<DisplayedItem>,
    loading: Seq<bool>,
    after: Seq<DisplayedItem>,
    k: int,
)
    requires
        0 <= k < after.len(),
        reused_tile(before, loading, after, k) is Some,
    ensures
        exists|d: int|
            0 <= d < before.len() && (#[trigger] before[d]).flow_child == reused_tile(
                before,
                loading,
                after,
                k,
            )->0 && before[d].media_id == after[k].media_id && !loading[d],
{
    lemma_loaded_tile(before, loading, after[k].media_id);
}

/// The progress counts no more thumbnails than photos, and tells every step of it
/// apart.
pub proof fn progress_texts_tell_the_steps_apart(total: int, a: int, b: int)
    requires
        0 <= a <= total,
        0 <= b <= total,
        stats_text(total, a) == stats_text(total, b),
    ensures
        a == b,
        forall|more: int| more > total ==> #[trigger] stats_text(total, more) == stats_text(total, total),
{
    let head = "媒体 "@ + decimal(total) + " 项 · 缩略图 "@;
    let foot = "/"@ + decimal(total);
    let (x, y) = (stats_text(total, a), stats_text(total, b));
    assert(x =~= head + decimal(a) + foot);
    assert(y =~= head + decimal(b) + foot);
    assert(x.len() == y.len());
    let (from, to) = (head.len() as int, x.len() - foot.len());
    assert(x.subrange(from, to) =~= decimal(a));
    assert(y.subrange(from, to) =~= decimal(b));
    decimal_texts_are_unique(a, b);
}

} // verus!
