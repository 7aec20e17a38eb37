//! What an album is, and which photos belong to it.

use crate::apply_to_media_list::{ui_media_list_cap, ListConfig};
use crate::calendar::Timestamp;
use crate::media::MediaItem;
use crate::media_list::MediaList;
use vstd::prelude::*;

verus! {

/// An album: a folder, or a virtual album that gathers photos of one kind.
pub struct Album {
    pub folder_path: String,
    pub name: String,
    pub cover_uri: Option<String>,
    pub photo_count: i64,
    pub last_modified: Timestamp,
    pub is_virtual: bool,
    pub kind: AlbumKind,
}

/// What an album gathers.
#[derive(Clone, Copy, Debug, PartialEq, Eq, Structural)]
pub enum AlbumKind {
    Favorites,
    Images,
    Videos,
    MotionPhotos,
    Animated,
    Hdr,
    Folder,
}

/// Attributes by which the library can be searched.
#[derive(Clone, Copy, Debug, PartialEq, Eq, Structural)]
pub enum MediaAttribute {
    Animated,
    Hdr,
}

/// Photos to read from the library.
pub enum MediaQuery {
    LiveAll,
    Favorites,
    Images,
    Videos,
    MotionPhotos,
    Attribute(MediaAttribute),
    AlbumFolder(String),
}

impl Clone for MediaQuery {
    fn clone(&self) -> (copy: Self)
        ensures
            copy == *self,
    {
        match self {
            MediaQuery::LiveAll => MediaQuery::LiveAll,
            MediaQuery::Favorites => MediaQuery::Favorites,
            MediaQuery::Images => MediaQuery::Images,
            MediaQuery::Videos => MediaQuery::Videos,
            MediaQuery::MotionPhotos => MediaQuery::MotionPhotos,
            MediaQuery::Attribute(attribute) => MediaQuery::Attribute(*attribute),
            MediaQuery::AlbumFolder(path) => MediaQuery::AlbumFolder(path.clone()),
        }
    }
}

impl Clone for Album {
    fn clone(&self) -> (copy: Self)
        ensures
            copy == *self,
    {
        Album {
            folder_path: self.folder_path.clone(),
            name: self.name.clone(),
            cover_uri: match &self.cover_uri {
                Some(uri) => Some(uri.clone()),
                None => None,
            },
            photo_count: self.photo_count,
            last_modified: self.last_modified,
            is_virtual: self.is_virtual,
            kind: self.kind,
        }
    }
}

/// The photos of an album, as a question to the library.
pub open spec fn album_query(album: Album) -> MediaQuery {
    match album.kind {
        AlbumKind::Favorites => MediaQuery::Favorites,
        AlbumKind::Images => MediaQuery::Images,
        AlbumKind::Videos => MediaQuery::Videos,
        AlbumKind::MotionPhotos => MediaQuery::MotionPhotos,
        AlbumKind::Animated => MediaQuery::Attribute(MediaAttribute::Animated),
        AlbumKind::Hdr => MediaQuery::Attribute(MediaAttribute::Hdr),
        AlbumKind::Folder => MediaQuery::AlbumFolder(album.folder_path),
    }
}

/// The photos of an album, as a question to the library.
pub fn media_query_for_album(album: &Album) -> (query: MediaQuery)
    ensures
        query == album_query(*album),
{
    match album.kind {
        AlbumKind::Favorites => MediaQuery::Favorites,
        AlbumKind::Images => MediaQuery::Images,
        AlbumKind::Videos => MediaQuery::Videos,
        AlbumKind::MotionPhotos => MediaQuery::MotionPhotos,
        AlbumKind::Animated => MediaQuery::Attribute(MediaAttribute::Animated),
        AlbumKind::Hdr => MediaQuery::Attribute(MediaAttribute::Hdr),
        AlbumKind::Folder => MediaQuery::AlbumFolder(album.folder_path.clone()),
    }
}

/// The photos of a list that lie in a folder, in list order.
pub open spec fn in_folder(items: Seq<MediaItem>, folder: Seq<char>) -> Seq<MediaItem>
    decreases items.len(),
{
    if items.len() == 0 {
        items
    } else {
        let front = in_folder(items.drop_last(), folder);
        if items.last().folder_path@ == folder {
            front.push(items.last())
        } else {
            front
        }
    }
}

/// The photos of the list that lie in a folder, in list order.
pub fn items_in_folder(master: &MediaList, folder: &String) -> (items: Vec<MediaItem>)
    requires
        master.wf(),
    ensures
        items@ == in_folder(master@.items, folder@),
{
    let ghost all = master@.items;
    let n: u32 = master.n_items();
    let mut items: Vec<MediaItem> = Vec::new();
    let mut i: u32 = 0;
    assert(all.subrange(0, 0) =~= Seq::<MediaItem>::empty());
    while i < n
        invariant
            all == master@.items,
            n == all.len(),
            i <= n,
            items@ == in_folder(all.subrange(0, i as int), folder@),
        decreases n - i,
    {
        let item: &MediaItem = master.item(i).unwrap();
        proof {
            assert(all.subrange(0, i + 1).drop_last() =~= all.subrange(0, i as int));
            assert(all.subrange(0, i + 1).last() == *item);
        }
        if item.folder_path == *folder {
            items.push(item.clone());
        }
        i += 1;
    }
    assert(all.subrange(0, all.len() as int) =~= all);
    items
}

/// The first `limit` of `items`.
pub open spec fn at_most(items: Seq<MediaItem>, limit: u32) -> Seq<MediaItem> {
    if items.len() > limit {
        items.subrange(0, limit as int)
    } else {
        items
    }
}

/// The first `limit` of `items`; at least one of them where there is any.
pub open spec fn limited(items: Seq<MediaItem>, limit: u32) -> Seq<MediaItem> {
    let count = if limit > 1 { limit as int } else { 1 };
    if items.len() > count {
        items.subrange(0, count)
    } else {
        items
    }
}

proof fn lemma_in_folder_prefix(items: Seq<MediaItem>, folder: Seq<char>, at: int)
    requires
        0 <= at <= items.len(),
    ensures
        in_folder(items.subrange(0, at), folder).len() <= in_folder(items, folder).len(),
        in_folder(items, folder).subrange(
            0,
            in_folder(items.subrange(0, at), folder).len() as int,
        ) == in_folder(items.subrange(0, at), folder),
    decreases items.len() - at,
{
    if at == items.len() {
        assert(items.subrange(0, at) =~= items);
        assert(in_folder(items, folder).subrange(0, in_folder(items, folder).len() as int)
            =~= in_folder(items, folder));
    } else {
        lemma_in_folder_prefix(items, folder, at + 1);
        let more = items.subrange(0, at + 1);
        assert(more.drop_last() =~= items.subrange(0, at));
        let now = in_folder(items.subrange(0, at), folder);
        let next = in_folder(more, folder);
        assert(in_folder(items, folder).subrange(0, now.len() as int) =~= now) by {
            assert forall|k: int| 0 <= k < now.len() implies in_folder(items, folder)[k]
                == now[k] by {
                assert(in_folder(items, folder).subrange(0, next.len() as int)[k] == next[k]);
            }
        }
    }
}

/// The photos that an album page starts with, up to `limit`: those that the
/// library has for a virtual album, `loaded`, else those of the list that lie in
/// its folder. Of a folder that holds photos one is there even for a `limit` of
/// zero.
pub fn filtered_items_for_album_limited(
    album: &Album,
    master: &MediaList,
    loaded: Vec<MediaItem>,
    limit: u32,
) -> (items: Vec<MediaItem>)
    requires
        master.wf(),
    ensures
        limit > 0 || album.is_virtual ==> items@.len() <= limit,
        items@ == if album.is_virtual {
            at_most(loaded@, limit)
        } else {
            limited(in_folder(master@.items, album.folder_path@), limit)
        },
{
    if album.is_virtual {
        let mut items: Vec<MediaItem> = loaded;
        items.truncate(limit as usize);
        assert(items@ =~= at_most(loaded@, limit));
        return items;
    }
    let ghost all = master@.items;
    let ghost folder = album.folder_path@;
    let n: u32 = master.n_items();
    let mut items: Vec<MediaItem> = Vec::new();
    let mut i: u32 = 0;
    let count: usize = if limit > 1 {
        limit as usize
    } else {
        1
    };
    assert(all.subrange(0, 0) =~= Seq::<MediaItem>::empty());
    while i < n
        invariant
            all == master@.items,
            folder == album.folder_path@,
            n == all.len(),
            i <= n,
            !album.is_virtual,
            count == if limit > 1 {
                limit as int
            } else {
                1
            },
            items@ == in_folder(all.subrange(0, i as int), folder),
            items@.len() < count,
        decreases n - i,
    {
        let item: &MediaItem = master.item(i).unwrap();
        proof {
            assert(all.subrange(0, i + 1).drop_last() =~= all.subrange(0, i as int));
            assert(all.subrange(0, i + 1).last() == *item);
        }
        if item.folder_path == album.folder_path {
            items.push(item.clone());
            if items.len() >= count {
                proof {
                    lemma_in_folder_prefix(all, folder, i + 1);
                    assert(items@ == in_folder(all.subrange(0, i + 1), folder));
                    assert(items@ =~= limited(in_folder(all, folder), limit));
                }
                return items;
            }
        }
        i += 1;
    }
    assert(all.subrange(0, all.len() as int) =~= all);
    items
}

/// How many of `total` photos a list of at most `cap` photos takes.
pub open spec fn refresh_limit(total: int, cap: int) -> int {
    if total < 0 {
        0
    } else if total < cap {
        total
    } else {
        cap
    }
}

/// How many photos a refresh of an album reads: all of them, but no more than a
/// list holds.
pub fn album_refresh_load_limit(total: i64, config: &ListConfig) -> (limit: u32)
    ensures
        limit == if total < 0 {
            0
        } else if total < config.ui_media_list_cap {
            total as int
        } else {
            config.ui_media_list_cap as int
        },
        limit == refresh_limit(total as int, config.ui_media_list_cap as int),
{
    let cap: u32 = ui_media_list_cap(config);
    if total < 0 {
        0
    } else if total < cap as i64 {
        total as u32
    } else {
        cap
    }
}

/// Every photo of a folder album lies in its folder, and comes from the list.
pub proof fn folder_albums_hold_their_folder(items: Seq<MediaItem>, folder: Seq<char>)
    ensures
        forall|k: int|
            0 <= k < in_folder(items, folder).len() ==> (#[trigger] in_folder(
                items,
                folder,
            )[k]).folder_path@ == folder && items.contains(in_folder(items, folder)[k]),
        forall|i: int|
            0 <= i < items.len() && (#[trigger] items[i]).folder_path@ == folder ==> in_folder(
                items,
                folder,
            ).contains(items[i]),
    decreases items.len(),
{
    if items.len() > 0 {
        let front = items.drop_last();
        folder_albums_hold_their_folder(front, folder);
        let before = in_folder(front, folder);
        let now = in_folder(items, folder);
        assert forall|k: int| 0 <= k < now.len() implies (#[trigger] now[k]).folder_path@ == folder
            && items.contains(now[k]) by {
            if k < before.len() {
                assert(now[k] == before[k]);
                let j = choose|j: int| 0 <= j < front.len() && front[j] == before[k];
                assert(items[j] == now[k]);
            } else {
                assert(items[items.len() - 1] == now[k]);
            }
        }
        assert forall|i: int|
            0 <= i < items.len() && (#[trigger] items[i]).folder_path@
                == folder implies now.contains(items[i]) by {
            if i < front.len() {
                assert(front[i] == items[i]);
                assert(before.contains(front[i]));
                let j = choose|j: int| 0 <= j < before.len() && before[j] == front[i];
                assert(now[j] == items[i]);
            } else {
                assert(now[now.len() - 1] == items[i]);
            }
        }
    }
}

/// A folder album keeps the order of the list, and every photo as often as the
/// list holds it.
pub proof fn folder_albums_keep_list_order(items: Seq<MediaItem>, folder: Seq<char>)
    ensures
        in_folder(items, folder) == items.filter(
            |item: MediaItem| item.folder_path@ == folder,
        ),
    decreases items.len(),
{
    reveal(Seq::filter);
    if items.len() > 0 {
        folder_albums_keep_list_order(items.drop_last(), folder);
    }
}

/// A page starts with the first photos of its album, as many as there are and as
/// the limit lets in; a folder shows one photo whatever the limit.
pub proof fn pages_start_at_the_front(items: Seq<MediaItem>, limit: u32)
    ensures
        at_most(items, limit).is_prefix_of(items),
        at_most(items, limit).len() <= limit,
        at_most(items, limit).len() == limit || at_most(items, limit) == items,
        limited(items, limit).is_prefix_of(items),
        limit > 0 ==> limited(items, limit) == at_most(items, limit),
        limit == 0 && items.len() > 0 ==> limited(items, limit) == seq![items[0]],
{
    assert(limit == 0 && items.len() > 0 ==> limited(items, limit) =~= seq![items[0]]);
}

/// A refresh reads every photo of the album that a list can hold, and no more.
pub proof fn refreshes_read_what_fits(total: int, cap: int)
    requires
        0 <= cap,
    ensures
        0 <= refresh_limit(total, cap) <= cap,
        0 <= total <= cap ==> refresh_limit(total, cap) == total,
        total >= cap ==> refresh_limit(total, cap) == cap,
        total < 0 ==> refresh_limit(total, cap) == 0,
{
}

/// Albums ask for the same photos exactly where they gather the same ones, and a
/// folder album asks for its own folder.
pub proof fn albums_ask_for_their_own_photos(a: Album, b: Album)
    ensures
        a.kind != AlbumKind::Folder ==> (album_query(a) == album_query(b) <==> a.kind == b.kind),
        a.kind == AlbumKind::Folder ==> album_query(a) == MediaQuery::AlbumFolder(a.folder_path),
        a.kind == AlbumKind::Favorites <==> album_query(a) is Favorites,
        a.kind == AlbumKind::Images <==> album_query(a) is Images,
        a.kind == AlbumKind::Videos <==> album_query(a) is Videos,
        a.kind == AlbumKind::MotionPhotos <==> album_query(a) is MotionPhotos,
        a.kind == AlbumKind::Animated <==> album_query(a) == MediaQuery::Attribute(
            MediaAttribute::Animated,
        ),
        a.kind == AlbumKind::Hdr <==> album_query(a) == MediaQuery::Attribute(MediaAttribute::Hdr),
{
}

} // verus!
