//! Albums: the pages that list them, the page of one album, and the picker that
//! adds photos to one.

pub mod album;
pub mod browser;
pub mod cover;
pub mod detail;
pub mod page;
pub mod picker;
