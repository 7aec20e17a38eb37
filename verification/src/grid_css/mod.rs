//! How thumbnail grids look and how the keyboard moves through them.

pub mod cursor;
pub mod material;
pub mod style;
