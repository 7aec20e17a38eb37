//! The photo editor: crop rules, what the panel and the page keep of an editing
//! session, and turning pixel buffers into images.

pub mod crop;
pub mod page;
pub mod panel;
pub mod pixels;
pub mod scale_row;
pub mod state;
