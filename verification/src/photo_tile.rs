//! One photo with a picture that is loaded for it.

use crate::calendar::Timestamp;
use crate::media::{MediaItem, ThumbnailSize};
use vstd::prelude::*;

verus! {

/// The side of a tile before a photo is set, in pixels.
pub const DEFAULT_TILE_SIZE: i32 = 125;

/// A tile.
pub struct PhotoTile {
    pub item: Option<MediaItem>,
    pub picture_size: i32,
    pub motion_badge_visible: bool,
    /// A picture is shown, not a placeholder.
    pub has_picture: bool,
    pub current_token: u64,
}

/// A picture to be loaded.
pub struct TileRequest {
    pub uri: String,
    pub size: ThumbnailSize,
    pub mtime: Timestamp,
    pub token: u64,
}

impl PhotoTile {
    /// A tile without a photo.
    pub fn new() -> (tile: PhotoTile)
        ensures
            tile.item is None,
            tile.picture_size == DEFAULT_TILE_SIZE,
            !tile.motion_badge_visible && !tile.has_picture,
            tile.current_token == 0,
    {
        PhotoTile {
            item: None,
            picture_size: DEFAULT_TILE_SIZE,
            motion_badge_visible: false,
            has_picture: false,
            current_token: 0,
        }
    }

    /// Show no picture.
    pub fn set_placeholder(&mut self)
        ensures
            *final(self) == (PhotoTile { has_picture: false, ..*old(self) }),
    {
        self.has_picture = false;
    }

    /// The tile with a photo whose picture is yet to come.
    pub open spec fn with_item(
        self,
        item: MediaItem,
        is_motion_photo: bool,
        pixel_size: i32,
    ) -> PhotoTile {
        PhotoTile {
            item: Some(item),
            picture_size: pixel_size,
            motion_badge_visible: is_motion_photo,
            has_picture: false,
            current_token: (self.current_token + 1) as u64,
        }
    }

    /// The tile after a picture came, or could not be had: only the picture
    /// asked for last is shown.
    pub open spec fn with_arrival(self, token: u64, loaded: bool) -> PhotoTile {
        PhotoTile {
            has_picture: self.has_picture || loaded && token == self.current_token,
            ..self
        }
    }

    /// Set the photo. Its picture is to be loaded; until it comes a placeholder
    /// is shown.
    pub fn set_item(
        &mut self,
        item: MediaItem,
        is_motion_photo: bool,
        thumb_size: ThumbnailSize,
        pixel_size: i32,
    ) -> (request: TileRequest)
        requires
            old(self).current_token < u64::MAX,
        ensures
            *final(self) == old(self).with_item(item, is_motion_photo, pixel_size),
            request.uri == item.uri,
            request.size == thumb_size,
            request.mtime == item.file_mtime,
            request.token == final(self).current_token,
    {
        let uri: String = item.uri.clone();
        let mtime: Timestamp = item.file_mtime;
        self.item = Some(item);
        self.picture_size = pixel_size;
        self.motion_badge_visible = is_motion_photo;
        self.set_placeholder();
        self.current_token = self.current_token + 1;
        TileRequest { uri, size: thumb_size, mtime, token: self.current_token }
    }

    /// A picture came, or could not be had; `true` when it is to be shown.
    pub fn picture_arrived(&mut self, token: u64, loaded: bool) -> (shown: bool)
        ensures
            shown == (loaded && token == old(self).current_token),
            *final(self) == old(self).with_arrival(token, loaded),
    {
        if !loaded || token != self.current_token {
            return false;
        }
        self.has_picture = true;
        true
    }
}

/// Once another photo is set, the picture of an earlier one does not show.
pub proof fn earlier_pictures_do_not_show(
    tile: PhotoTile,
    item: MediaItem,
    is_motion_photo: bool,
    pixel_size: i32,
    token: u64,
    loaded: bool,
)
    requires
        tile.current_token < u64::MAX,
        token <= tile.current_token,
    ensures
        tile.with_item(item, is_motion_photo, pixel_size).with_arrival(token, loaded)
            == tile.with_item(item, is_motion_photo, pixel_size),
{
}

/// The picture that was asked for last shows when it comes, and a placeholder
/// stands in its place until then and where it cannot be had.
pub proof fn the_latest_picture_shows(
    tile: PhotoTile,
    item: MediaItem,
    is_motion_photo: bool,
    pixel_size: i32,
)
    requires
        tile.current_token < u64::MAX,
    ensures
        ({
            let set = tile.with_item(item, is_motion_photo, pixel_size);
            &&& set.item == Some(item)
            &&& set.picture_size == pixel_size
            &&& set.motion_badge_visible == is_motion_photo
            &&& !set.has_picture
            &&& set.with_arrival(set.current_token, true).has_picture
            &&& !set.with_arrival(set.current_token, false).has_picture
        }),
{
}

} // verus!
