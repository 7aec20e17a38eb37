//! The logic of a photo viewer: the media list behind the photo grids, the
//! sectioned grid itself, virtual paging, selection, keyboard bindings, the
//! mode selector, albums and the editor's crop and rotation rules.
//!
//! Everything here works on plain values. Widgets, the database and timers
//! stay outside: they hand events in and carry the returned decisions out.

pub mod albums;
pub mod apply_to_media_list;
pub mod calendar;
pub mod diagnostics;
pub mod editor;
pub mod empty_states;
pub mod glass_context_menu;
pub mod grid_css;
pub mod grid_row;
pub mod keyboard;
pub mod media;
pub mod media_grid;
pub mod media_list;
pub mod media_list_laws;
pub mod media_window_model;
pub mod mode_selector;
pub mod photo_tile;
pub mod text;
