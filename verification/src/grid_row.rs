//! One row of a flat grid model: a section header or a photo.

use crate::media::MediaItem;
use vstd::prelude::*;

verus! {

/// A section header or a photo. The photo is boxed so that headers stay small.
#[derive(Debug)]
pub enum GridRow {
    Header { label: String },
    Photo { item: Box<MediaItem>, global_index: u32 },
}

impl Clone for GridRow {
    fn clone(&self) -> (copy: Self)
        ensures
            copy == *self,
    {
        match self {
            GridRow::Header { label } => GridRow::Header { label: label.clone() },
            GridRow::Photo { item, global_index } => GridRow::Photo {
                item: Box::new((**item).clone()),
                global_index: *global_index,
            },
        }
    }
}

} // verus!
