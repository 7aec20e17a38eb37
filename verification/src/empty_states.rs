//! What a view shows where it has nothing else to show.

use vstd::prelude::*;

verus! {

/// The text below the title.
pub enum StatusText {
    /// No text.
    Absent,
    /// The text with this key.
    Key(&'static str),
    /// This text.
    Literal(String),
}

/// A page with an icon, a title and a text.
pub struct StatusPage {
    pub icon_name: Option<&'static str>,
    pub title_key: &'static str,
    pub description: StatusText,
    pub compact: bool,
}

/// Is this the page with this icon, title and text?
pub open spec fn says(
    page: StatusPage,
    icon_name: Seq<char>,
    title_key: Seq<char>,
    description_key: Seq<char>,
) -> bool {
    &&& page.icon_name matches Some(icon) && icon@ == icon_name
    &&& page.title_key@ == title_key
    &&& page.description matches StatusText::Key(key) && key@ == description_key
}

/// For the photos: none were imported yet.
pub fn no_photos() -> (page: StatusPage)
    ensures
        says(
            page,
            "image-x-generic-symbolic"@,
            "empty.no_photos.title"@,
            "empty.no_photos.description"@,
        ),
        page.compact,
{
    StatusPage {
        icon_name: Some("image-x-generic-symbolic"),
        title_key: "empty.no_photos.title",
        description: StatusText::Key("empty.no_photos.description"),
        compact: true,
    }
}

/// For the albums: no folder was found.
pub fn no_albums() -> (page: StatusPage)
    ensures
        says(
            page,
            "folder-symbolic"@,
            "empty.no_albums.title"@,
            "empty.no_albums.description"@,
        ),
        !page.compact,
{
    StatusPage {
        icon_name: Some("folder-symbolic"),
        title_key: "empty.no_albums.title",
        description: StatusText::Key("empty.no_albums.description"),
        compact: false,
    }
}

/// For the trash: it holds no photos.
pub fn empty_trash() -> (page: StatusPage)
    ensures
        says(
            page,
            "user-trash-symbolic"@,
            "empty.trash_empty.title"@,
            "empty.trash_empty.description"@,
        ),
        !page.compact,
{
    StatusPage {
        icon_name: Some("user-trash-symbolic"),
        title_key: "empty.trash_empty.title",
        description: StatusText::Key("empty.trash_empty.description"),
        compact: false,
    }
}

/// For one album: it holds no photos.
pub fn no_album_photos() -> (page: StatusPage)
    ensures
        says(
            page,
            "image-missing-symbolic"@,
            "empty.no_album_photos.title"@,
            "empty.no_album_photos.description"@,
        ),
        !page.compact,
{
    StatusPage {
        icon_name: Some("image-missing-symbolic"),
        title_key: "empty.no_album_photos.title",
        description: StatusText::Key("empty.no_album_photos.description"),
        compact: false,
    }
}

/// For a scan that failed, with the reason.
pub fn scan_error(msg: &str) -> (page: StatusPage)
    ensures
        page.icon_name matches Some(icon) && icon@ == "dialog-warning-symbolic"@,
        page.title_key@ == "empty.scan_failed.title"@,
        page.description matches StatusText::Literal(text) && text@ == msg@,
        !page.compact,
{
    StatusPage {
        icon_name: Some("dialog-warning-symbolic"),
        title_key: "empty.scan_failed.title",
        description: StatusText::Literal(msg.to_owned()),
        compact: false,
    }
}

/// While photos are being read.
pub fn loading() -> (page: StatusPage)
    ensures
        page.icon_name is None,
        page.title_key@ == "empty.loading"@,
        page.description is Absent,
        !page.compact,
{
    StatusPage {
        icon_name: None,
        title_key: "empty.loading",
        description: StatusText::Absent,
        compact: false,
    }
}

} // verus!
