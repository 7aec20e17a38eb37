//! The cover of an album.

use super::album::Album;
use crate::calendar::Timestamp;
use crate::media::{ThumbnailSize, ThumbnailTier};
use vstd::prelude::*;

verus! {

/// What a cover shows.
#[derive(Clone, Copy, Debug, PartialEq, Eq, Structural)]
pub enum CoverPicture {
    Placeholder,
    Loaded,
}

/// The cover of an album.
pub struct AlbumCover {
    pub uri: Option<String>,
    pub mtime: Timestamp,
    pub requested: bool,
    pub picture: CoverPicture,
    /// Whether the picture is light, where that is known.
    pub background_is_light: Option<bool>,
}

/// A cover to be loaded.
pub struct CoverRequest {
    pub uri: String,
    pub size: ThumbnailSize,
    pub mtime: Timestamp,
    pub tier: ThumbnailTier,
}

impl AlbumCover {
    /// Does the cover ask for a picture when it comes into view?
    pub open spec fn asks(self) -> bool {
        self.uri is Some && !self.requested
    }

    /// The cover after it came into view.
    pub open spec fn after_request(self) -> AlbumCover {
        AlbumCover { requested: self.requested || self.asks(), ..self }
    }

    /// The cover after its picture was loaded, or could not be (`None`).
    pub open spec fn finished(self, loaded: Option<Option<bool>>) -> AlbumCover {
        match loaded {
            Some(light) => AlbumCover {
                picture: CoverPicture::Loaded,
                background_is_light: if light is Some {
                    light
                } else {
                    self.background_is_light
                },
                ..self
            },
            None => AlbumCover { picture: CoverPicture::Placeholder, ..self },
        }
    }

    /// The cover of an album, which shows a placeholder at first.
    pub fn new(album: &Album) -> (cover: AlbumCover)
        ensures
            cover.uri == album.cover_uri,
            cover.mtime == album.last_modified,
            !cover.requested,
            cover.picture == CoverPicture::Placeholder,
            cover.background_is_light is None,
    {
        let uri: Option<String> = match &album.cover_uri {
            Some(uri) => Some(uri.clone()),
            None => None,
        };
        AlbumCover {
            uri,
            mtime: album.last_modified,
            requested: false,
            picture: CoverPicture::Placeholder,
            background_is_light: None,
        }
    }

    /// The cover has come into view: it is asked for once, if the album has one.
    pub fn request_once(&mut self) -> (request: Option<CoverRequest>)
        ensures
            request is Some <==> old(self).uri is Some && !old(self).requested,
            request matches Some(found) ==> {
                &&& Some(found.uri) == old(self).uri
                &&& found.size == ThumbnailSize::Large
                &&& found.mtime == old(self).mtime
                &&& found.tier == ThumbnailTier::Normal
            },
            *final(self) == (AlbumCover {
                requested: old(self).requested || request is Some,
                ..*old(self)
            }),
            request is Some <==> old(self).asks(),
            *final(self) == old(self).after_request(),
    {
        if self.requested {
            return None;
        }
        match &self.uri {
            None => None,
            Some(uri) => {
                let uri: String = uri.clone();
                self.requested = true;
                Some(
                    CoverRequest {
                        uri,
                        size: ThumbnailSize::Large,
                        mtime: self.mtime,
                        tier: ThumbnailTier::Normal,
                    },
                )
            },
        }
    }

    /// The cover was loaded, with a word on whether it is light where that is
    /// known, or could not be (`None`).
    pub fn finish(&mut self, loaded: Option<Option<bool>>)
        ensures
            *final(self) == match loaded {
                Some(light) => AlbumCover {
                    picture: CoverPicture::Loaded,
                    background_is_light: if light is Some {
                        light
                    } else {
                        old(self).background_is_light
                    },
                    ..*old(self)
                },
                None => AlbumCover { picture: CoverPicture::Placeholder, ..*old(self) },
            },
            *final(self) == old(self).finished(loaded),
    {
        match loaded {
            Some(light) => {
                if light.is_some() {
                    self.background_is_light = light;
                }
                self.picture = CoverPicture::Loaded;
            },
            None => {
                self.picture = CoverPicture::Placeholder;
            },
        }
    }
}

/// A cover is asked for when it first comes into view and never again, whatever
/// comes of it. A picture that came shows, and one that could not be had leaves
/// the placeholder.
pub proof fn covers_are_asked_for_once(cover: AlbumCover, loaded: Option<Option<bool>>)
    ensures
        cover.uri is None ==> !cover.asks(),
        cover.uri is Some && !cover.requested ==> cover.asks(),
        !cover.after_request().asks(),
        !cover.after_request().finished(loaded).asks(),
        cover.finished(loaded).uri == cover.uri,
        cover.finished(loaded).picture == CoverPicture::Loaded <==> loaded is Some,
        loaded is Some && loaded->0 is Some ==> cover.finished(loaded).background_is_light
            == loaded->0,
        loaded is None || loaded->0 is None ==> cover.finished(loaded).background_is_light
            == cover.background_is_light,
{
}

} // verus!
