//! The page with the albums of the library as tiles.

use super::album::{items_in_folder, Album};
#[allow(unused_imports)]
use super::album::in_folder;
use crate::media::MediaItem;
use crate::media_list::MediaList;
#[allow(unused_imports)]
use crate::text::{decimal, decimal_texts_read_back, number_in};
use crate::text::decimal_text;
use vstd::prelude::*;

verus! {

/// The page with the albums of the library as tiles.
pub struct AlbumsPage {
    pub albums: Vec<Album>,
    pub has_nav: bool,
}

/// An album to be opened, with its photos.
pub struct AlbumOpening {
    pub album: Album,
    pub items: Vec<MediaItem>,
}

/// How many photos an album holds, in words.
pub open spec fn count_text(count: int) -> Seq<char> {
    if count < 0 {
        "-"@ + decimal(-count) + " photos"@
    } else {
        decimal(count) + " photos"@
    }
}

/// How many photos an album holds, in words.
pub fn count_label(count: i64) -> (label: String)
    ensures
        label@ == if count < 0 {
            "-"@ + decimal(-count) + " photos"@
        } else {
            decimal(count as int) + " photos"@
        },
        label@ == count_text(count as int),
{
    let mut label: String = String::new();
    let digits: String = if count < 0 {
        label.append("-");
        decimal_text((-(count as i128)) as u64)
    } else {
        decimal_text(count as u64)
    };
    label.append(digits.as_str());
    label.append(" photos");
    assert(label@ =~= if count < 0 {
        "-"@ + decimal(-count) + " photos"@
    } else {
        decimal(count as int) + " photos"@
    });
    label
}

impl AlbumsPage {
    /// A page that shows `albums`.
    pub fn new(albums: Vec<Album>) -> (page: AlbumsPage)
        ensures
            page.albums == albums,
            !page.has_nav,
    {
        AlbumsPage { albums, has_nav: false }
    }

    /// Whether the page shows a word that there are no albums.
    pub fn is_empty(&self) -> (empty: bool)
        ensures
            empty == (self.albums@.len() == 0),
    {
        self.albums.is_empty()
    }

    /// Note that there is a place to open albums in.
    pub fn set_nav_target(&mut self)
        ensures
            *final(self) == (AlbumsPage { has_nav: true, ..*old(self) }),
    {
        self.has_nav = true;
    }

    /// The album behind tile `index`, with the photos of `master` that lie in
    /// its folder. `None` where there is no such tile or nowhere to open it.
    pub fn open_album_at(&self, index: i32, master: &MediaList) -> (opening: Option<AlbumOpening>)
        requires
            master.wf(),
        ensures
            opening is Some <==> self.has_nav && 0 <= index < self.albums@.len(),
            opening matches Some(found) ==> {
                &&& found.album == self.albums@[index as int]
                &&& found.items@ == in_folder(
                    master@.items,
                    self.albums@[index as int].folder_path@,
                )
            },
    {
        if index < 0 || !self.has_nav || index as usize >= self.albums.len() {
            return None;
        }
        let album: &Album = &self.albums[index as usize];
        let items: Vec<MediaItem> = items_in_folder(master, &album.folder_path);
        Some(AlbumOpening { album: album.clone(), items })
    }
}

/// The label of an album begins with the number of its photos.
pub proof fn labels_tell_the_count(count: int)
    requires
        0 <= count,
    ensures
        ({
            let text = count_text(count);
            &&& text.len() > 7
            &&& number_in(text.subrange(0, text.len() - 7)) == count
            &&& text.subrange(text.len() - 7, text.len() as int) == " photos"@
        }),
{
    reveal_strlit(" photos");
    decimal_texts_read_back(count);
    let text = count_text(count);
    assert(" photos"@.len() == 7);
    assert(decimal(count).len() >= 1);
    assert(text.subrange(0, text.len() - 7) =~= decimal(count));
    assert(text.subrange(text.len() - 7, text.len() as int) =~= " photos"@);
}

} // verus!
